//! The lookup services, and the address at which each is asked.

use crate::json::keys_of;
use vstd::prelude::*;
use vstd::string::*;

verus! {

/// One lookup service.
pub struct GeoIPService {
    /// The address to ask, with `{ip}` in place of the IP address. Filled with
    /// nothing, it asks for the address that the request comes from.
    pub url: &'static str,
    /// The object keys that lead to the timezone in the service's answer.
    pub tz_keys: Vec<&'static str>,
}

/// A lookup service as the contracts see it.
pub struct Service {
    /// The address to ask, with the placeholder.
    pub url: Seq<char>,
    /// The object keys that lead to the timezone.
    pub tz_keys: Seq<Seq<char>>,
}

impl View for GeoIPService {
    type V = Service;

    open spec fn view(&self) -> Service {
        Service { url: self.url@, tz_keys: keys_of(self.tz_keys@) }
    }
}

/// The services that are asked, in the order in which they are asked.
pub open spec fn service_table() -> Seq<Service> {
    seq![
        Service {
            url: "https://geoip.chrisdown.name/{ip}"@,
            tz_keys: seq!["location"@, "time_zone"@],
        },
        Service { url: "https://api.ipbase.com/v1/json/{ip}"@, tz_keys: seq!["time_zone"@] },
        Service { url: "https://ipapi.co/{ip}/json/"@, tz_keys: seq!["timezone"@] },
        Service { url: "https://worldtimeapi.org/api/ip/{ip}"@, tz_keys: seq!["timezone"@] },
        Service { url: "https://reallyfreegeoip.org/json/{ip}"@, tz_keys: seq!["time_zone"@] },
        Service { url: "https://ipwho.is/{ip}"@, tz_keys: seq!["timezone"@, "id"@] },
        Service { url: "https://ipinfo.io/{ip}/json"@, tz_keys: seq!["timezone"@] },
    ]
}

/// The mark in a service's address that stands for the IP address.
pub open spec fn placeholder() -> Seq<char> {
    seq!['{', 'i', 'p', '}']
}

/// `template` holds the placeholder from its character `at` on.
pub open spec fn placeholder_at(template: Seq<char>, at: int) -> bool {
    0 <= at <= template.len() - 4 && template.subrange(at, at + 4) == placeholder()
}

/// `template` holds the placeholder somewhere.
pub open spec fn has_placeholder(template: Seq<char>) -> bool {
    exists|at: int| placeholder_at(template, at)
}

/// `template` with `ip` in place of each placeholder, taken from left to
/// right.
pub open spec fn filled(template: Seq<char>, ip: Seq<char>) -> Seq<char>
    decreases template.len(),
{
    if template.len() < 4 {
        template
    } else if template.take(4) == placeholder() {
        ip + filled(template.skip(4), ip)
    } else {
        seq![template[0]] + filled(template.skip(1), ip)
    }
}

/// Text that is too short to hold the placeholder, or does not begin with
/// it, keeps its first character.
proof fn lemma_filled_keeps(template: Seq<char>, ip: Seq<char>)
    requires
        template.len() > 0,
        template.len() < 4 || template.take(4) != placeholder(),
    ensures
        filled(template, ip) == seq![template[0]] + filled(template.skip(1), ip),
{
    if template.len() < 4 {
        assert(template =~= seq![template[0]] + template.skip(1));
    }
}

/// A template whose first placeholder begins at `at` is filled by keeping
/// what stands before it, putting `ip` in its place, and filling what
/// follows it.
pub proof fn law_first_placeholder(template: Seq<char>, ip: Seq<char>, at: int)
    requires
        placeholder_at(template, at),
        forall|before: int| 0 <= before < at ==> !placeholder_at(template, before),
    ensures
        filled(template, ip) == template.take(at) + ip + filled(template.skip(at + 4), ip),
    decreases at,
{
    if at == 0 {
        assert(template.take(4) =~= template.subrange(0, 4));
        assert(template.take(0) + ip =~= ip);
    } else {
        let rest = template.skip(1);
        assert(!placeholder_at(template, 0));
        assert(template.take(4) =~= template.subrange(0, 4));
        assert(rest.subrange(at - 1, at + 3) =~= template.subrange(at, at + 4));
        assert forall|before: int| 0 <= before < at - 1 implies !placeholder_at(rest, before) by {
            assert(!placeholder_at(template, before + 1));
            assert(rest.subrange(before, before + 4) =~= template.subrange(
                before + 1,
                before + 5,
            ));
        }
        law_first_placeholder(rest, ip, at - 1);
        assert(rest.skip(at + 3) =~= template.skip(at + 4));
        assert(seq![template[0]] + rest.take(at - 1) =~= template.take(at));
        assert(seq![template[0]] + (rest.take(at - 1) + ip + filled(rest.skip(at + 3), ip))
            =~= seq![template[0]] + rest.take(at - 1) + ip + filled(rest.skip(at + 3), ip));
    }
}

/// A template without a placeholder is its own filling.
pub proof fn law_nothing_to_fill(template: Seq<char>, ip: Seq<char>)
    requires
        !has_placeholder(template),
    ensures
        filled(template, ip) == template,
    decreases template.len(),
{
    if template.len() >= 4 {
        let rest = template.skip(1);
        assert(!placeholder_at(template, 0));
        assert(template.take(4) =~= template.subrange(0, 4));
        assert forall|at: int| !placeholder_at(rest, at) by {
            assert(!placeholder_at(template, at + 1));
            if 0 <= at <= rest.len() - 4 {
                assert(rest.subrange(at, at + 4) =~= template.subrange(at + 1, at + 5));
            }
        }
        law_nothing_to_fill(rest, ip);
        assert(seq![template[0]] + rest =~= template);
    }
}

/// The address at which to ask a service about `ip`: the service's template
/// with `ip` in place of each `{ip}`.
pub fn request_url(template: &str, ip: &str) -> (url: String)
    ensures
        url@ == filled(template@, ip@),
{
    let length = template.unicode_len();
    let mut url = String::new();
    let mut kept: usize = 0;
    let mut at: usize = 0;
    assert(template@.skip(0) =~= template@);
    assert(template@.subrange(0, 0) =~= Seq::<char>::empty());
    while at < length
        invariant
            kept <= at <= length == template@.len(),
            filled(template@, ip@) == url@ + template@.subrange(kept as int, at as int) + filled(
                template@.skip(at as int),
                ip@,
            ),
        decreases length - at,
    {
        let ghost rest = template@.skip(at as int);
        if length - at >= 4 && template.get_char(at) == '{' && template.get_char(at + 1) == 'i'
            && template.get_char(at + 2) == 'p' && template.get_char(at + 3) == '}' {
            assert(rest.take(4) =~= placeholder());
            assert(rest.skip(4) =~= template@.skip(at + 4));
            url.append(template.substring_char(kept, at));
            url.append(ip);
            at += 4;
            kept = at;
            assert(template@.subrange(kept as int, at as int) =~= Seq::<char>::empty());
        } else {
            proof {
                if rest.len() >= 4 {
                    assert(rest.take(4)[0] == rest[0] && rest.take(4)[1] == rest[1] && rest.take(
                        4,
                    )[2] == rest[2] && rest.take(4)[3] == rest[3]);
                }
                lemma_filled_keeps(rest, ip@);
                assert(rest.skip(1) =~= template@.skip(at + 1));
                assert(template@.subrange(kept as int, at as int) + seq![rest[0]]
                    =~= template@.subrange(kept as int, at + 1));
            }
            at += 1;
        }
    }
    assert(template@.skip(at as int) =~= Seq::<char>::empty());
    url.append(template.substring_char(kept, at));
    url
}

/// Every service of the table has the placeholder in its address, and keys
/// to follow in its answer.
pub proof fn law_services_are_complete()
    ensures
        service_table().len() == 7,
        forall|i: int|
            0 <= i < service_table().len() ==> has_placeholder(#[trigger] service_table()[i].url)
                && service_table()[i].tz_keys.len() > 0,
{
    reveal_strlit("https://geoip.chrisdown.name/{ip}");
    reveal_strlit("https://api.ipbase.com/v1/json/{ip}");
    reveal_strlit("https://ipapi.co/{ip}/json/");
    reveal_strlit("https://worldtimeapi.org/api/ip/{ip}");
    reveal_strlit("https://reallyfreegeoip.org/json/{ip}");
    reveal_strlit("https://ipwho.is/{ip}");
    reveal_strlit("https://ipinfo.io/{ip}/json");
    let table = service_table();
    assert(table[0].url.subrange(29, 33) =~= placeholder());
    assert(placeholder_at(table[0].url, 29));
    assert(table[1].url.subrange(31, 35) =~= placeholder());
    assert(placeholder_at(table[1].url, 31));
    assert(table[2].url.subrange(17, 21) =~= placeholder());
    assert(placeholder_at(table[2].url, 17));
    assert(table[3].url.subrange(32, 36) =~= placeholder());
    assert(placeholder_at(table[3].url, 32));
    assert(table[4].url.subrange(33, 37) =~= placeholder());
    assert(placeholder_at(table[4].url, 33));
    assert(table[5].url.subrange(17, 21) =~= placeholder());
    assert(placeholder_at(table[5].url, 17));
    assert(table[6].url.subrange(18, 22) =~= placeholder());
    assert(placeholder_at(table[6].url, 18));
}

/// The services that are asked.
pub fn services() -> (list: Vec<GeoIPService>)
    ensures
        list.len() == service_table().len(),
        forall|i: int| 0 <= i < list.len() ==> (#[trigger] list[i])@ == service_table()[i],
{
    let list = vec![
        GeoIPService {
            url: "https://geoip.chrisdown.name/{ip}",
            tz_keys: vec!["location", "time_zone"],
        },
        GeoIPService { url: "https://api.ipbase.com/v1/json/{ip}", tz_keys: vec!["time_zone"] },
        GeoIPService { url: "https://ipapi.co/{ip}/json/", tz_keys: vec!["timezone"] },
        GeoIPService { url: "https://worldtimeapi.org/api/ip/{ip}", tz_keys: vec!["timezone"] },
        GeoIPService { url: "https://reallyfreegeoip.org/json/{ip}", tz_keys: vec!["time_zone"] },
        GeoIPService { url: "https://ipwho.is/{ip}", tz_keys: vec!["timezone", "id"] },
        GeoIPService { url: "https://ipinfo.io/{ip}/json", tz_keys: vec!["timezone"] },
    ];
    proof {
        assert(list[0]@.tz_keys =~= service_table()[0].tz_keys);
        assert(list[1]@.tz_keys =~= service_table()[1].tz_keys);
        assert(list[2]@.tz_keys =~= service_table()[2].tz_keys);
        assert(list[3]@.tz_keys =~= service_table()[3].tz_keys);
        assert(list[4]@.tz_keys =~= service_table()[4].tz_keys);
        assert(list[5]@.tz_keys =~= service_table()[5].tz_keys);
        assert(list[6]@.tz_keys =~= service_table()[6].tz_keys);
    }
    list
}

} // verus!
