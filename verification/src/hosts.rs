//! The hosts of a podcast as its page shows them: the placeholder host that stands for
//! "nobody known yet", the line of host names, and the addresses behind the host chips.

use vstd::prelude::*;

use crate::episode_page::{url_encode, url_encoded};
use crate::text::{append_chars, chars_of, decimal, decimal_chars, join_strings, joined, str_eq, string_from_chars};

verus! {

/// A person the server lists for a podcast.
pub struct HostPerson {
    pub name: String,
    pub role: Option<String>,
    pub img: Option<String>,
}

/// The listing holds only the placeholder the server writes when it knows no host:
/// one person named `Unknown Host` in the role `Host`.
pub open spec fn only_unknown_host(people: Seq<HostPerson>) -> bool {
    &&& people.len() == 1
    &&& people[0].name@ == "Unknown Host"@
    &&& people[0].role matches Some(r) && r@ == "Host"@
}

/// Whether the listing is only the placeholder host.
pub fn has_unknown_host(people: &Vec<HostPerson>) -> (r: bool)
    ensures
        r == only_unknown_host(people@),
{
    if people.len() != 1 {
        return false;
    }
    let p = &people[0];
    if !str_eq(p.name.as_str(), "Unknown Host") {
        return false;
    }
    match &p.role {
        Some(role) => str_eq(role.as_str(), "Host"),
        None => false,
    }
}

/// The names as one line: `A`, `A & B`, `A, B & C`, and so on; empty for no names.
pub open spec fn names_line(names: Seq<Seq<char>>) -> Seq<char> {
    if names.len() == 0 {
        seq![]
    } else if names.len() == 1 {
        names[0]
    } else {
        joined(names.drop_last(), ", "@) + " & "@ + names.last()
    }
}

/// The names of the hosts, as the banner writes them.
pub fn host_names_line(people: &Vec<HostPerson>) -> (r: String)
    ensures
        r@ == names_line(people@.map_values(|p: HostPerson| p.name@)),
{
    let ghost names = people@.map_values(|p: HostPerson| p.name@);
    let n = people.len();
    if n == 0 {
        return String::new();
    }
    if n == 1 {
        return people[0].name.clone();
    }
    let mut rest: Vec<String> = Vec::new();
    let mut i: usize = 0;
    while i < n - 1
        invariant
            n == people.len(),
            n >= 2,
            i <= n - 1,
            rest@.map_values(|p: String| p@) == names.take(i as int),
            names == people@.map_values(|p: HostPerson| p.name@),
        decreases n - 1 - i,
    {
        let ghost before = rest@.map_values(|p: String| p@);
        let name = people[i].name.clone();
        rest.push(name);
        assert(rest@.map_values(|p: String| p@) =~= before.push(names[i as int]));
        assert(names.take(i + 1) =~= names.take(i as int).push(names[i as int]));
        i = i + 1;
    }
    assert(names.take((n - 1) as int) =~= names.drop_last());
    let head = join_strings(&rest, ", ");
    let mut out = chars_of(head.as_str());
    append_chars(&mut out, &chars_of(" & "));
    append_chars(&mut out, &chars_of(people[n - 1].name.as_str()));
    string_from_chars(&out)
}

/// Where hosts can be added for a podcast: `{people_url}/podcast/{index id}`, with an empty
/// base when the server names no people service.
pub fn host_page_url(people_url: &Option<String>, podcast_index_id: i64) -> (r: String)
    ensures
        r@ == match people_url {
            Some(u) => u@,
            None => Seq::<char>::empty(),
        } + "/podcast/"@ + decimal(podcast_index_id as int),
{
    let mut out: Vec<char> = match people_url {
        Some(u) => chars_of(u.as_str()),
        None => Vec::new(),
    };
    append_chars(&mut out, &chars_of("/podcast/"));
    append_chars(&mut out, &decimal_chars(podcast_index_id));
    string_from_chars(&out)
}

/// A host's picture fetched through the server: `{server}/api/proxy/image?url={encoded url}`.
pub fn proxied_image_url(server: &str, url: &str) -> (r: String)
    ensures
        r@ == server@ + "/api/proxy/image?url="@ + url_encoded(url@),
{
    let mut out = chars_of(server);
    append_chars(&mut out, &chars_of("/api/proxy/image?url="));
    let enc = url_encode(url);
    append_chars(&mut out, &chars_of(enc.as_str()));
    string_from_chars(&out)
}

/// The picture of each host, where the listing has one, fetched through the server.
pub fn host_image_urls(server: &str, people: &Vec<HostPerson>) -> (r: Vec<Option<String>>)
    ensures
        r@.len() == people@.len(),
        forall|i: int|
            0 <= i < people@.len() ==> match (#[trigger] people@[i]).img {
                Some(u) => r@[i] matches Some(x) && x@ == server@ + "/api/proxy/image?url="@
                    + url_encoded(u@),
                None => r@[i] is None,
            },
{
    let mut out: Vec<Option<String>> = Vec::new();
    let mut i: usize = 0;
    while i < people.len()
        invariant
            i <= people.len(),
            out@.len() == i,
            forall|k: int|
                0 <= k < i ==> match (#[trigger] people@[k]).img {
                    Some(u) => out@[k] matches Some(x) && x@ == server@ + "/api/proxy/image?url="@
                        + url_encoded(u@),
                    None => out@[k] is None,
                },
        decreases people.len() - i,
    {
        let item = match &people[i].img {
            Some(u) => Some(proxied_image_url(server, u.as_str())),
            None => None,
        };
        out.push(item);
        i = i + 1;
    }
    out
}

} // verus!
