//! The DoH request line and the compiled-in configuration: the candidate
//! resolver endpoints and the hostnames to resolve.

use vstd::prelude::*;
use vstd::string::StringExecFns;

verus! {

/// The query string appended between the resolver URL and the hostname.
pub open spec fn query_prefix() -> Seq<char> {
    "?ct=application/dns-json&name="@
}

/// The query string appended after the hostname: an A-record lookup with
/// DNSSEC data and checking left off.
pub open spec fn query_suffix() -> Seq<char> {
    "&type=A&do=false&cd=false"@
}

/// The full GET URL for one DoH query: the resolver base URL, then the
/// fixed query parameters with the hostname in the middle.
pub fn build_query_url(resolver: &str, hostname: &str) -> (r: String)
    ensures
        r@ == resolver@ + query_prefix() + hostname@ + query_suffix(),
{
    let mut r = String::from_str(resolver);
    r.append("?ct=application/dns-json&name=");
    r.append(hostname);
    r.append("&type=A&do=false&cd=false");
    proof {
        assert(r@ =~= resolver@ + query_prefix() + hostname@ + query_suffix());
    }
    r
}

/// The candidate DoH endpoints, in the priority order they are probed in.
pub fn resolver_urls() -> (r: Vec<String>)
    ensures
        r@.len() == 3,
        r@[0]@ == "https://1.0.0.1/dns-query"@,
        r@[1]@ == "https://1.1.1.1/dns-query"@,
        r@[2]@ == "https://cloudflare-dns.com/dns-query"@,
{
    let mut r: Vec<String> = Vec::new();
    r.push(String::from_str("https://1.0.0.1/dns-query"));
    r.push(String::from_str("https://1.1.1.1/dns-query"));
    r.push(String::from_str("https://cloudflare-dns.com/dns-query"));
    r
}

/// The hostnames to resolve, in the order their lines appear in the output.
/// The first entry doubles as the probe hostname during resolver selection.
pub fn target_hostnames() -> (r: Vec<String>)
    ensures
        r@.len() == 35,
        r@[0]@ == "github.io"@,
        r@[1]@ == "github.com"@,
        r@[2]@ == "github.dev"@,
        r@[3]@ == "github.blog"@,
        r@[4]@ == "github.community"@,
        r@[5]@ == "api.github.com"@,
        r@[6]@ == "gist.github.com"@,
        r@[7]@ == "alive.github.com"@,
        r@[8]@ == "live.github.com"@,
        r@[9]@ == "central.github.com"@,
        r@[10]@ == "assets-cdn.github.com"@,
        r@[11]@ == "gist.github.com"@,
        r@[12]@ == "codeload.github.com"@,
        r@[13]@ == "github.githubassets.com"@,
        r@[14]@ == "desktop.githubusercontent.com"@,
        r@[15]@ == "camo.githubusercontent.com"@,
        r@[16]@ == "github.map.fastly.net"@,
        r@[17]@ == "github.global.ssl.fastly.net"@,
        r@[18]@ == "raw.githubusercontent.com"@,
        r@[19]@ == "user-images.githubusercontent.com"@,
        r@[20]@ == "favicons.githubusercontent.com"@,
        r@[21]@ == "avatars.githubusercontent.com"@,
        r@[22]@ == "avatars0.githubusercontent.com"@,
        r@[23]@ == "avatars1.githubusercontent.com"@,
        r@[24]@ == "avatars2.githubusercontent.com"@,
        r@[25]@ == "avatars3.githubusercontent.com"@,
        r@[26]@ == "avatars4.githubusercontent.com"@,
        r@[27]@ == "avatars5.githubusercontent.com"@,
        r@[28]@ == "github-cloud.s3.amazonaws.com"@,
        r@[29]@ == "github-com.s3.amazonaws.com"@,
        r@[30]@ == "github-production-release-asset-2e65be.s3.amazonaws.com"@,
        r@[31]@ == "github-production-user-asset-6210df.s3.amazonaws.com"@,
        r@[32]@ == "github-production-repository-file-5c1aeb.s3.amazonaws.com"@,
        r@[33]@ == "githubstatus.com"@,
        r@[34]@ == "media.githubusercontent.com"@,
{
    let mut r: Vec<String> = Vec::new();
    r.push(String::from_str("github.io"));
    r.push(String::from_str("github.com"));
    r.push(String::from_str("github.dev"));
    r.push(String::from_str("github.blog"));
    r.push(String::from_str("github.community"));
    r.push(String::from_str("api.github.com"));
    r.push(String::from_str("gist.github.com"));
    r.push(String::from_str("alive.github.com"));
    r.push(String::from_str("live.github.com"));
    r.push(String::from_str("central.github.com"));
    r.push(String::from_str("assets-cdn.github.com"));
    r.push(String::from_str("gist.github.com"));
    r.push(String::from_str("codeload.github.com"));
    r.push(String::from_str("github.githubassets.com"));
    r.push(String::from_str("desktop.githubusercontent.com"));
    r.push(String::from_str("camo.githubusercontent.com"));
    r.push(String::from_str("github.map.fastly.net"));
    r.push(String::from_str("github.global.ssl.fastly.net"));
    r.push(String::from_str("raw.githubusercontent.com"));
    r.push(String::from_str("user-images.githubusercontent.com"));
    r.push(String::from_str("favicons.githubusercontent.com"));
    r.push(String::from_str("avatars.githubusercontent.com"));
    r.push(String::from_str("avatars0.githubusercontent.com"));
    r.push(String::from_str("avatars1.githubusercontent.com"));
    r.push(String::from_str("avatars2.githubusercontent.com"));
    r.push(String::from_str("avatars3.githubusercontent.com"));
    r.push(String::from_str("avatars4.githubusercontent.com"));
    r.push(String::from_str("avatars5.githubusercontent.com"));
    r.push(String::from_str("github-cloud.s3.amazonaws.com"));
    r.push(String::from_str("github-com.s3.amazonaws.com"));
    r.push(String::from_str("github-production-release-asset-2e65be.s3.amazonaws.com"));
    r.push(String::from_str("github-production-user-asset-6210df.s3.amazonaws.com"));
    r.push(String::from_str("github-production-repository-file-5c1aeb.s3.amazonaws.com"));
    r.push(String::from_str("githubstatus.com"));
    r.push(String::from_str("media.githubusercontent.com"));
    r
}

} // verus!
