use vstd::prelude::*;
use vstd::string::*;

verus! {

/// One request header, by its lower-case name.
#[derive(Clone, Debug)]
pub struct Header {
    pub name: String,
    pub value: String,
}

/// A source's configuration file as it is stored.
#[derive(Clone, Debug)]
pub struct RequestConfigJson {
    pub url: String,
    pub calendar_id: String,
    pub headers: Vec<Header>,
}

/// A source's resolved configuration: where its index lies, which calendar
/// receives its events, and the headers sent with every request.
#[derive(Clone, Debug)]
pub struct RequestConfig {
    pub url: String,
    pub calendar_id: String,
    pub headers: Vec<Header>,
}

/// A header name that no request may set.
#[derive(Clone, Debug)]
pub struct UnknownHeader {
    pub name: String,
}

/// The header names a configuration may set.
pub open spec fn known_header(name: Seq<char>) -> bool {
    name == "accept"@ || name == "accept-language"@ || name == "authorization"@ || name
        == "cache-control"@ || name == "cookie"@ || name == "dnt"@ || name == "origin"@ || name
        == "referer"@ || name == "upgrade-insecure-requests"@ || name == "user-agent"@
}

pub fn is_known_header(name: &String) -> (r: bool)
    ensures
        r == known_header(name@),
{
    *name == String::from_str("accept") || *name == String::from_str("accept-language") || *name
        == String::from_str("authorization") || *name == String::from_str("cache-control")
        || *name == String::from_str("cookie") || *name == String::from_str("dnt") || *name
        == String::from_str("origin") || *name == String::from_str("referer") || *name
        == String::from_str("upgrade-insecure-requests") || *name == String::from_str(
        "user-agent",
    )
}

/// The headers `hs` set, later entries overriding earlier ones, over `m`.
pub open spec fn applied(m: Map<Seq<char>, Seq<char>>, hs: Seq<Header>) -> Map<
    Seq<char>,
    Seq<char>,
>
    decreases hs.len(),
{
    if hs.len() == 0 {
        m
    } else {
        applied(m, hs.drop_last()).insert(hs.last().name@, hs.last().value@)
    }
}

/// The headers a list sets.
pub open spec fn header_map(hs: Seq<Header>) -> Map<Seq<char>, Seq<char>> {
    applied(Map::empty(), hs)
}

pub open spec fn all_known(hs: Seq<Header>) -> bool {
    forall|i: int| 0 <= i < hs.len() ==> known_header(#[trigger] hs[i].name@)
}

/// No name is set twice.
pub open spec fn distinct_names(hs: Seq<Header>) -> bool {
    forall|i: int, j: int| 0 <= i < j < hs.len() ==> #[trigger] hs[i].name@ != #[trigger] hs[j].name@
}

/// With distinct names, the map of a list sets each entry's name to its
/// value, and nothing else.
proof fn lemma_header_map(hs: Seq<Header>)
    requires
        distinct_names(hs),
    ensures
        forall|i: int|
            0 <= i < hs.len() ==> #[trigger] header_map(hs).contains_key(hs[i].name@)
                && header_map(hs)[hs[i].name@] == hs[i].value@,
        forall|k: Seq<char>|
            #[trigger] header_map(hs).contains_key(k) ==> exists|i: int|
                0 <= i < hs.len() && hs[i].name@ == k,
    decreases hs.len(),
{
    if hs.len() > 0 {
        let rest = hs.drop_last();
        assert forall|i: int, j: int| 0 <= i < j < rest.len() implies rest[i].name@
            != rest[j].name@ by {
            assert(rest[i] == hs[i] && rest[j] == hs[j]);
        }
        lemma_header_map(rest);
        assert(header_map(hs) == header_map(rest).insert(hs.last().name@, hs.last().value@));
        assert forall|i: int| 0 <= i < hs.len() implies #[trigger] header_map(hs).contains_key(
            hs[i].name@,
        ) && header_map(hs)[hs[i].name@] == hs[i].value@ by {
            if i < hs.len() - 1 {
                assert(rest[i] == hs[i]);
                assert(hs[i].name@ != hs[hs.len() - 1].name@);
            }
        }
        assert forall|k: Seq<char>| #[trigger] header_map(hs).contains_key(k) implies exists|
            i: int,
        | 0 <= i < hs.len() && hs[i].name@ == k by {
            if k != hs.last().name@ {
                assert(header_map(rest).contains_key(k));
                let i = choose|i: int| 0 <= i < rest.len() && rest[i].name@ == k;
                assert(hs[i] == rest[i]);
            } else {
                assert(hs[hs.len() - 1].name@ == k);
            }
        }
    }
}

/// Sets header `h` in `map`, replacing the value of a header of the same
/// name.
fn set_header(map: &mut Vec<Header>, h: Header)
    requires
        distinct_names(old(map)@),
    ensures
        distinct_names(final(map)@),
        header_map(final(map)@) == header_map(old(map)@).insert(h.name@, h.value@),
{
    proof {
        lemma_header_map(map@);
    }
    let mut i: usize = 0;
    while i < map.len()
        invariant
            i <= map@.len(),
            map@ == old(map)@,
            distinct_names(map@),
            forall|j: int| 0 <= j < i ==> map@[j].name@ != h.name@,
        decreases map.len() - i,
    {
        if map[i].name == h.name {
            let ghost before = map@;
            assert(before[i as int].name@ == h.name@);
            map.set(i, h);
            proof {
                lemma_header_map(before);
                assert forall|a: int, b: int| 0 <= a < b < map@.len() implies map@[a].name@
                    != map@[b].name@ by {
                    assert(before[a].name@ != before[b].name@);
                }
                lemma_header_map(map@);
                assert(header_map(map@) =~= header_map(before).insert(h.name@, h.value@)) by {
                    assert forall|k: Seq<char>| #[trigger] header_map(map@).contains_key(k)
                        <==> header_map(before).insert(h.name@, h.value@).contains_key(k) by {
                        if header_map(map@).contains_key(k) {
                            let j = choose|j: int| 0 <= j < map@.len() && map@[j].name@ == k;
                            if j != i as int {
                                assert(map@[j] == before[j]);
                            }
                        }
                        if header_map(before).contains_key(k) {
                            let j = choose|j: int| 0 <= j < before.len() && before[j].name@ == k;
                            if j != i as int {
                                assert(map@[j] == before[j]);
                            }
                        }
                    }
                    assert forall|k: Seq<char>| #[trigger] header_map(map@).contains_key(k)
                        implies header_map(map@)[k] == header_map(before).insert(
                        h.name@,
                        h.value@,
                    )[k] by {
                        let j = choose|j: int| 0 <= j < map@.len() && map@[j].name@ == k;
                        if j != i as int {
                            assert(map@[j] == before[j]);
                        }
                    }
                }
            }
            return ;
        }
        i = i + 1;
    }
    let ghost before = map@;
    let ghost name = h.name@;
    let ghost value = h.value@;
    map.push(h);
    proof {
        assert(map@.drop_last() =~= before);
        assert forall|a: int, b: int| 0 <= a < b < map@.len() implies map@[a].name@
            != map@[b].name@ by {
            if b < before.len() {
                assert(before[a].name@ != before[b].name@);
            }
        }
    }
}

/// Sets each of `headers`, in order, in `header_map`; stops with an error
/// at the first name that no request may set, leaving the headers before it
/// set.
pub fn headers_modifier(headers: &Vec<Header>, header_map_out: &mut Vec<Header>) -> (r: Result<
    (),
    UnknownHeader,
>)
    requires
        distinct_names(old(header_map_out)@),
    ensures
        distinct_names(final(header_map_out)@),
        r is Ok <==> all_known(headers@),
        r is Ok ==> header_map(final(header_map_out)@) == applied(
            header_map(old(header_map_out)@),
            headers@,
        ),
{
    let ghost start = header_map(header_map_out@);
    let mut i: usize = 0;
    while i < headers.len()
        invariant
            i <= headers@.len(),
            distinct_names(header_map_out@),
            all_known(headers@.take(i as int)),
            header_map(header_map_out@) == applied(start, headers@.take(i as int)),
        decreases headers.len() - i,
    {
        let h = &headers[i];
        if !is_known_header(&h.name) {
            proof {
                assert(!known_header(headers@[i as int].name@));
            }
            return Err(UnknownHeader { name: h.name.clone() });
        }
        set_header(header_map_out, Header { name: h.name.clone(), value: h.value.clone() });
        proof {
            assert(headers@.take(i + 1).drop_last() =~= headers@.take(i as int));
            assert(headers@.take(i + 1).last() == headers@[i as int]);
            assert forall|j: int| 0 <= j < i + 1 implies known_header(
                #[trigger] headers@.take(i + 1)[j].name@,
            ) by {
                if j < i {
                    assert(headers@.take(i + 1)[j] == headers@.take(i as int)[j]);
                }
            }
        }
        i = i + 1;
    }
    assert(headers@.take(headers@.len() as int) =~= headers@);
    Ok(())
}

impl RequestConfig {
    /// Resolves a source's configuration from its default file, the custom
    /// file over it, and the calendar given on start-up, if any: the custom
    /// file's URL and calendar, unless `calendar_id` overrides the calendar,
    /// and the headers of both files, the custom ones prevailing. Fails at
    /// the first header name that no request may set.
    pub fn from_layers(
        default: RequestConfigJson,
        custom: RequestConfigJson,
        calendar_id: Option<String>,
    ) -> (r: Result<RequestConfig, UnknownHeader>)
        ensures
            r is Ok <==> all_known(default.headers@) && all_known(custom.headers@),
            match r {
                Ok(c) => c.url@ == custom.url@ && c.calendar_id@ == match calendar_id {
                    Some(id) => id@,
                    None => custom.calendar_id@,
                } && distinct_names(c.headers@) && header_map(c.headers@) == applied(
                    header_map(default.headers@),
                    custom.headers@,
                ),
                Err(_) => true,
            },
    {
        let mut headers: Vec<Header> = Vec::new();
        assert(header_map(headers@) == Map::<Seq<char>, Seq<char>>::empty());
        headers_modifier(&default.headers, &mut headers)?;
        assert(applied(Map::empty(), default.headers@) == header_map(default.headers@));
        headers_modifier(&custom.headers, &mut headers)?;
        let chosen = match calendar_id {
            Some(id) => id,
            None => custom.calendar_id,
        };
        Ok(RequestConfig { url: custom.url, calendar_id: chosen, headers })
    }
}

} // verus!
