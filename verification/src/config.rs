//! The fixed tables of the tool: the TLDs searched, the tracked
//! registrars, their search-page URL templates and the preferred
//! registrars, with the lookups over them.
use vstd::prelude::*;
use crate::text::{occurs_at, replace_all, replace_str, str_eq};

verus! {

/// The views of a sequence of string slices.
pub open spec fn str_views(s: Seq<&'static str>) -> Seq<Seq<char>> {
    s.map_values(|x: &'static str| x@)
}

/// The views of a sequence of pairs of string slices.
pub open spec fn pair_views(s: Seq<(&'static str, &'static str)>) -> Seq<(Seq<char>, Seq<char>)> {
    s.map_values(|p: (&'static str, &'static str)| (p.0@, p.1@))
}

/// The TLDs a search covers, in order.
pub open spec fn tld_table() -> Seq<Seq<char>> {
    seq![
        "com"@, "io"@, "dev"@, "app"@, "net"@,
        "org"@, "co"@, "me"@, "ai"@, "xyz"@,
        "info"@, "shop"@, "store"@, "cloud"@, "tech"@,
        "online"@, "site"@, "pro"@, "gg"@, "to"@,
    ]
}

/// The TLDs a search covers, in order.
pub fn tlds() -> (v: Vec<&'static str>)
    ensures
        str_views(v@) == tld_table(),
{
    let v = vec![
        "com", "io", "dev", "app", "net",
        "org", "co", "me", "ai", "xyz",
        "info", "shop", "store", "cloud", "tech",
        "online", "site", "pro", "gg", "to",
    ];
    assert(str_views(v@) =~= tld_table());
    v
}


/// A registrar whose prices are tracked per TLD: its slug and its label.
pub struct RegistrarInfo {
    pub slug: &'static str,
    pub label: &'static str,
}

/// The number of tracked registrars.
pub const REGISTRAR_COUNT: usize = 6;

/// The tracked registrars (slug and label), in column order.
pub open spec fn registrar_table() -> Seq<(Seq<char>, Seq<char>)> {
    seq![
        ("cloudflare"@, "Cloudflare"@),
        ("porkbun"@, "Porkbun"@),
        ("namecheap"@, "Namecheap"@),
        ("godaddy"@, "GoDaddy"@),
        ("dynadot"@, "Dynadot"@),
        ("spaceship"@, "Spaceship"@),
    ]
}

/// The views of a sequence of registrar records.
pub open spec fn registrar_views(s: Seq<RegistrarInfo>) -> Seq<(Seq<char>, Seq<char>)> {
    s.map_values(|r: RegistrarInfo| (r.slug@, r.label@))
}

/// The tracked registrars, in column order.
pub fn registrars() -> (v: Vec<RegistrarInfo>)
    ensures
        registrar_views(v@) == registrar_table(),
        v@.len() == REGISTRAR_COUNT,
{
    let v = vec![
        RegistrarInfo { slug: "cloudflare", label: "Cloudflare" },
        RegistrarInfo { slug: "porkbun", label: "Porkbun" },
        RegistrarInfo { slug: "namecheap", label: "Namecheap" },
        RegistrarInfo { slug: "godaddy", label: "GoDaddy" },
        RegistrarInfo { slug: "dynadot", label: "Dynadot" },
        RegistrarInfo { slug: "spaceship", label: "Spaceship" },
    ];
    assert(registrar_views(v@) =~= registrar_table());
    v
}

/// The tracked registrar in column `i`.
pub fn registrar_at(i: usize) -> (r: RegistrarInfo)
    requires
        i < REGISTRAR_COUNT,
    ensures
        (r.slug@, r.label@) == registrar_table()[i as int],
{
    let v = registrars();
    let r = RegistrarInfo { slug: v[i].slug, label: v[i].label };
    assert(registrar_views(v@)[i as int] == (r.slug@, r.label@));
    r
}

/// The search-page URL templates, by registrar slug: the tracked
/// registrars first, then those that the index often names cheapest.
pub open spec fn url_table() -> Seq<(Seq<char>, Seq<char>)> {
    seq![
        ("cloudflare"@, "https://domains.cloudflare.com/?domain={domain}"@),
        ("porkbun"@, "https://porkbun.com/checkout/search?q={domain}"@),
        ("namecheap"@, "https://www.namecheap.com/domains/registration/results/?domain={domain}"@),
        ("godaddy"@, "https://www.godaddy.com/domainsearch/find?domainToCheck={domain}"@),
        ("dynadot"@, "https://www.dynadot.com/domain/search.html?domain={domain}"@),
        ("spaceship"@, "https://www.spaceship.com/domain-search/"@),
        ("regery"@, "https://regery.com/en/domains/search?q={domain}"@),
        ("mchost"@, "https://mchost.com/services/domains/check/?domain={domain}"@),
        ("sav"@, "https://www.sav.com/?domain={domain}"@),
        ("ovhcloud"@, "https://www.ovhcloud.com/en/domains/domain-name-checker/"@),
        ("ionos"@, "https://www.ionos.com/domains/domain-check?domainName={domain}"@),
        ("one"@, "https://www.one.com/en/domain/?q={domain}"@),
        ("infomaniak"@, "https://www.infomaniak.com/en/domains/find?q={domain}"@),
        ("gname"@, "https://www.gname.com/domain_check?domain={domain}"@),
        ("domgate"@, "https://www.domgate.com/domaincheck?domain={domain}"@),
        ("101domain"@, "https://www.101domain.com/domain_search.htm?domain={domain}"@),
        ("inwx"@, "https://www.inwx.com/en/domain/search"@),
        ("ovh"@, "https://www.ovh.com/us/domains/domain_search/?search={domain}"@),
        ("atakdomain"@, "https://www.atakdomain.com/en/domain/search?q={domain}"@),
        ("onlydomains"@, "https://www.onlydomains.com/domain-search?q={domain}"@),
        ("gandi"@, "https://www.gandi.net/en/domain/search?q={domain}"@),
        ("namesilo"@, "https://www.namesilo.com/domain/search-domains?q={domain}"@),
        ("openprovider"@, "https://www.openprovider.com/domain-check/?domain={domain}"@),
        ("loopia"@, "https://www.loopia.com/domain/?q={domain}"@),
        ("hexonet"@, "https://www.hexonet.net/domain-check?domain={domain}"@),
        ("planethoster"@, "https://www.planethoster.com/en/Domain-Search?q={domain}"@),
        ("netim"@, "https://www.netim.com/en/domain-name-search?q={domain}"@),
        ("above"@, "https://www.above.com/domain-search/?q={domain}"@),
        ("squarespace"@, "https://www.squarespace.com/domain-search?q={domain}"@),
        ("namecom"@, "https://www.name.com/domain/search/{domain}"@),
        ("bigrock"@, "https://www.bigrock.in/domain-search?q={domain}"@),
        ("blacknight"@, "https://www.blacknight.com/domain-names/?q={domain}"@),
        ("dreamhost"@, "https://www.dreamhost.com/domains/?q={domain}"@),
        ("hostinger"@, "https://www.hostinger.com/domain-name-search?q={domain}"@),
        ("wix"@, "https://www.wix.com/domain/names?q={domain}"@),
        ("wordpress"@, "https://wordpress.com/domains/?q={domain}"@),
        ("dinahosting"@, "https://www.dinahosting.com/en/domains/search?q={domain}"@),
        ("network-solutions"@, "https://www.networksolutions.com/domain-name-search?q={domain}"@),
        ("internetbs"@, "https://internetbs.net/en/domain-search?q={domain}"@),
        ("uk2"@, "https://www.uk2.net/domain-check/?q={domain}"@),
        ("123-reg"@, "https://www.123-reg.co.uk/domain-search?q={domain}"@),
        ("encirca"@, "https://www.encirca.com/domain-search/?q={domain}"@),
        ("instra"@, "https://www.instra.com/en/domain-names/domain-name-search?domain={domain}"@),
        ("nicenic"@, "https://nic.names/domain/{domain}"@),
        ("web.z"@, "https://www.z.com/jp/domain/search/?q={domain}"@),
    ]
}

/// The search-page URL templates, by registrar slug; `{domain}` stands for
/// the full domain. Registrars whose search page is a script-driven app
/// are linked without it.
pub fn registrar_urls() -> (v: Vec<(&'static str, &'static str)>)
    ensures
        pair_views(v@) == url_table(),
{
    let v = vec![
        ("cloudflare", "https://domains.cloudflare.com/?domain={domain}"),
        ("porkbun", "https://porkbun.com/checkout/search?q={domain}"),
        ("namecheap", "https://www.namecheap.com/domains/registration/results/?domain={domain}"),
        ("godaddy", "https://www.godaddy.com/domainsearch/find?domainToCheck={domain}"),
        ("dynadot", "https://www.dynadot.com/domain/search.html?domain={domain}"),
        ("spaceship", "https://www.spaceship.com/domain-search/"),
        ("regery", "https://regery.com/en/domains/search?q={domain}"),
        ("mchost", "https://mchost.com/services/domains/check/?domain={domain}"),
        ("sav", "https://www.sav.com/?domain={domain}"),
        ("ovhcloud", "https://www.ovhcloud.com/en/domains/domain-name-checker/"),
        ("ionos", "https://www.ionos.com/domains/domain-check?domainName={domain}"),
        ("one", "https://www.one.com/en/domain/?q={domain}"),
        ("infomaniak", "https://www.infomaniak.com/en/domains/find?q={domain}"),
        ("gname", "https://www.gname.com/domain_check?domain={domain}"),
        ("domgate", "https://www.domgate.com/domaincheck?domain={domain}"),
        ("101domain", "https://www.101domain.com/domain_search.htm?domain={domain}"),
        ("inwx", "https://www.inwx.com/en/domain/search"),
        ("ovh", "https://www.ovh.com/us/domains/domain_search/?search={domain}"),
        ("atakdomain", "https://www.atakdomain.com/en/domain/search?q={domain}"),
        ("onlydomains", "https://www.onlydomains.com/domain-search?q={domain}"),
        ("gandi", "https://www.gandi.net/en/domain/search?q={domain}"),
        ("namesilo", "https://www.namesilo.com/domain/search-domains?q={domain}"),
        ("openprovider", "https://www.openprovider.com/domain-check/?domain={domain}"),
        ("loopia", "https://www.loopia.com/domain/?q={domain}"),
        ("hexonet", "https://www.hexonet.net/domain-check?domain={domain}"),
        ("planethoster", "https://www.planethoster.com/en/Domain-Search?q={domain}"),
        ("netim", "https://www.netim.com/en/domain-name-search?q={domain}"),
        ("above", "https://www.above.com/domain-search/?q={domain}"),
        ("squarespace", "https://www.squarespace.com/domain-search?q={domain}"),
        ("namecom", "https://www.name.com/domain/search/{domain}"),
        ("bigrock", "https://www.bigrock.in/domain-search?q={domain}"),
        ("blacknight", "https://www.blacknight.com/domain-names/?q={domain}"),
        ("dreamhost", "https://www.dreamhost.com/domains/?q={domain}"),
        ("hostinger", "https://www.hostinger.com/domain-name-search?q={domain}"),
        ("wix", "https://www.wix.com/domain/names?q={domain}"),
        ("wordpress", "https://wordpress.com/domains/?q={domain}"),
        ("dinahosting", "https://www.dinahosting.com/en/domains/search?q={domain}"),
        ("network-solutions", "https://www.networksolutions.com/domain-name-search?q={domain}"),
        ("internetbs", "https://internetbs.net/en/domain-search?q={domain}"),
        ("uk2", "https://www.uk2.net/domain-check/?q={domain}"),
        ("123-reg", "https://www.123-reg.co.uk/domain-search?q={domain}"),
        ("encirca", "https://www.encirca.com/domain-search/?q={domain}"),
        ("instra", "https://www.instra.com/en/domain-names/domain-name-search?domain={domain}"),
        ("nicenic", "https://nic.names/domain/{domain}"),
        ("web.z", "https://www.z.com/jp/domain/search/?q={domain}"),
    ];
    assert(pair_views(v@) =~= url_table());
    v
}

/// The template of the first entry of `table` whose slug is `slug`.
pub open spec fn lookup_template(table: Seq<(Seq<char>, Seq<char>)>, slug: Seq<char>) -> Option<
    Seq<char>,
>
    decreases table.len(),
{
    if table.len() == 0 {
        None
    } else if table[0].0 == slug {
        Some(table[0].1)
    } else {
        lookup_template(table.drop_first(), slug)
    }
}

/// The placeholder that a URL template holds for the domain.
pub open spec fn domain_placeholder() -> Seq<char> {
    "{domain}"@
}

/// The search URL for `domain` at the registrar `slug`: its template with
/// every placeholder replaced by the domain, or nothing for a registrar
/// without a template.
pub open spec fn search_url(slug: Seq<char>, domain: Seq<char>) -> Option<Seq<char>> {
    match lookup_template(url_table(), slug) {
        Some(t) => Some(replace_all(t, domain_placeholder(), domain)),
        None => None,
    }
}

/// The search page of registrar `slug` with `domain` filled in, when the
/// registrar has a URL template.
pub fn registrar_search_url(slug: &str, domain: &str) -> (r: Option<String>)
    ensures
        match r {
            Some(u) => search_url(slug@, domain@) == Some(u@),
            None => search_url(slug@, domain@) is None,
        },
{
    let urls = registrar_urls();
    let n = urls.len();
    let ghost table = url_table();
    let mut i: usize = 0;
    assert(table.subrange(0, n as int) =~= table);
    while i < n
        invariant
            n == urls@.len(),
            pair_views(urls@) == table,
            table == url_table(),
            i <= n,
            lookup_template(table.subrange(i as int, n as int), slug@) == lookup_template(
                table,
                slug@,
            ),
        decreases n - i,
    {
        let ghost rest = table.subrange(i as int, n as int);
        assert(rest[0] == (urls@[i as int].0@, urls@[i as int].1@));
        if str_eq(urls[i].0, slug) {
            let template = urls[i].1;
            let placeholder = "{domain}";
            proof {
                reveal_strlit("{domain}");
            }
            return Some(replace_str(template, placeholder, domain));
        }
        assert(rest.drop_first() =~= table.subrange(i + 1, n as int));
        i = i + 1;
    }
    None
}

/// The preferred registrars: well-known US/EU registrars whose prices get
/// a ~5% advantage when sorting and when choosing the best offer.
pub open spec fn preferred_table() -> Seq<Seq<char>> {
    seq![
        "cloudflare"@, "porkbun"@, "namecheap"@, "godaddy"@,
        "dynadot"@, "spaceship"@, "sav"@, "namecom"@,
        "squarespace"@, "ionos"@, "ovhcloud"@, "ovh"@,
        "gandi"@, "infomaniak"@, "namesilo"@, "hostinger"@,
        "one"@, "loopia"@, "netim"@, "dinahosting"@,
        "dreamhost"@, "wordpress"@, "wix"@, "blacknight"@,
        "gname"@,
    ]
}

/// The preferred registrars.
pub fn preferred_registrars() -> (v: Vec<&'static str>)
    ensures
        str_views(v@) == preferred_table(),
{
    let v = vec![
        "cloudflare", "porkbun", "namecheap", "godaddy",
        "dynadot", "spaceship", "sav", "namecom",
        "squarespace", "ionos", "ovhcloud", "ovh",
        "gandi", "infomaniak", "namesilo", "hostinger",
        "one", "loopia", "netim", "dinahosting",
        "dreamhost", "wordpress", "wix", "blacknight",
        "gname",
    ];
    assert(str_views(v@) =~= preferred_table());
    v
}

/// Whether `slug` is one of the preferred registrars.
pub open spec fn preferred(slug: Seq<char>) -> bool {
    preferred_table().contains(slug)
}

/// Whether the registrar `slug` is one of the preferred registrars.
pub fn is_preferred(slug: &str) -> (r: bool)
    ensures
        r == preferred(slug@),
{
    let prefs = preferred_registrars();
    let n = prefs.len();
    let mut i: usize = 0;
    while i < n
        invariant
            n == prefs@.len(),
            str_views(prefs@) == preferred_table(),
            i <= n,
            forall|j: int| 0 <= j < i ==> preferred_table()[j] != slug@,
        decreases n - i,
    {
        assert(str_views(prefs@)[i as int] == prefs@[i as int]@);
        if str_eq(prefs[i], slug) {
            assert(preferred_table()[i as int] == slug@);
            return true;
        }
        i = i + 1;
    }
    false
}

/// The weight of a preferred registrar's price, out of `WEIGHT_SCALE`:
/// a 5% advantage.
pub const PREFERENCE_WEIGHT: u64 = 95;

/// The scale that weighted prices are expressed in.
pub const WEIGHT_SCALE: u64 = 100;

/// A price weighted by preference, in units of 1/`WEIGHT_SCALE` of the
/// price's own unit.
pub open spec fn weighted(price: nat, slug: Seq<char>) -> nat {
    if preferred(slug) {
        price * 95
    } else {
        price * 100
    }
}

/// The price of registrar `slug` weighted by preference: 95% of it for a
/// preferred registrar, all of it otherwise, counted in hundredths of the
/// price's unit so that the comparison stays exact.
pub fn adjusted_price(price: u64, slug: &str) -> (r: u128)
    ensures
        r == weighted(price as nat, slug@),
{
    if is_preferred(slug) {
        (price as u128) * (PREFERENCE_WEIGHT as u128)
    } else {
        (price as u128) * (WEIGHT_SCALE as u128)
    }
}

/// A slug held by some entry of the table has a template.
pub proof fn lemma_template_found(table: Seq<(Seq<char>, Seq<char>)>, slug: Seq<char>, k: int)
    requires
        0 <= k < table.len(),
        table[k].0 == slug,
    ensures
        lookup_template(table, slug) is Some,
    decreases table.len(),
{
    if table[0].0 != slug {
        assert(table.drop_first()[k - 1] == table[k]);
        lemma_template_found(table.drop_first(), slug, k - 1);
    }
}

/// Every tracked registrar has a search URL template.
pub proof fn lemma_tracked_registrars_have_templates()
    ensures
        forall|i: int|
            0 <= i < registrar_table().len() ==> lookup_template(url_table(), #[trigger] registrar_table()[i].0) is Some,
{
    assert forall|i: int| 0 <= i < registrar_table().len() implies lookup_template(
        url_table(),
        #[trigger] registrar_table()[i].0,
    ) is Some by {
        lemma_template_found(url_table(), registrar_table()[i].0, i);
    }
}

/// Every preferred registrar has a search URL template.
pub proof fn lemma_preferred_registrars_have_templates()
    ensures
        forall|i: int|
            0 <= i < preferred_table().len() ==> lookup_template(url_table(), #[trigger] preferred_table()[i]) is Some,
{
    assert forall|i: int| 0 <= i < preferred_table().len() implies lookup_template(
        url_table(),
        #[trigger] preferred_table()[i],
    ) is Some by {
        if i == 0 {
            lemma_template_found(url_table(), preferred_table()[i], 0);
        } else if i == 1 {
            lemma_template_found(url_table(), preferred_table()[i], 1);
        } else if i == 2 {
            lemma_template_found(url_table(), preferred_table()[i], 2);
        } else if i == 3 {
            lemma_template_found(url_table(), preferred_table()[i], 3);
        } else if i == 4 {
            lemma_template_found(url_table(), preferred_table()[i], 4);
        } else if i == 5 {
            lemma_template_found(url_table(), preferred_table()[i], 5);
        } else if i == 6 {
            lemma_template_found(url_table(), preferred_table()[i], 8);
        } else if i == 7 {
            lemma_template_found(url_table(), preferred_table()[i], 29);
        } else if i == 8 {
            lemma_template_found(url_table(), preferred_table()[i], 28);
        } else if i == 9 {
            lemma_template_found(url_table(), preferred_table()[i], 10);
        } else if i == 10 {
            lemma_template_found(url_table(), preferred_table()[i], 9);
        } else if i == 11 {
            lemma_template_found(url_table(), preferred_table()[i], 17);
        } else if i == 12 {
            lemma_template_found(url_table(), preferred_table()[i], 20);
        } else if i == 13 {
            lemma_template_found(url_table(), preferred_table()[i], 12);
        } else if i == 14 {
            lemma_template_found(url_table(), preferred_table()[i], 21);
        } else if i == 15 {
            lemma_template_found(url_table(), preferred_table()[i], 33);
        } else if i == 16 {
            lemma_template_found(url_table(), preferred_table()[i], 11);
        } else if i == 17 {
            lemma_template_found(url_table(), preferred_table()[i], 23);
        } else if i == 18 {
            lemma_template_found(url_table(), preferred_table()[i], 26);
        } else if i == 19 {
            lemma_template_found(url_table(), preferred_table()[i], 36);
        } else if i == 20 {
            lemma_template_found(url_table(), preferred_table()[i], 32);
        } else if i == 21 {
            lemma_template_found(url_table(), preferred_table()[i], 35);
        } else if i == 22 {
            lemma_template_found(url_table(), preferred_table()[i], 34);
        } else if i == 23 {
            lemma_template_found(url_table(), preferred_table()[i], 31);
        } else if i == 24 {
            lemma_template_found(url_table(), preferred_table()[i], 13);
        }
    }
}

/// `d` stands in `u` at position `i`.
pub open spec fn text_at(u: Seq<char>, d: Seq<char>, i: int) -> bool {
    0 <= i && i + d.len() <= u.len() && u.subrange(i, i + d.len()) == d
}

/// `d` stands somewhere in `u`.
pub open spec fn contains_text(u: Seq<char>, d: Seq<char>) -> bool {
    exists|i: int| text_at(u, d, i)
}

/// The placeholder occurs in `t`.
pub open spec fn has_placeholder(t: Seq<char>) -> bool {
    exists|p: int| occurs_at(t, domain_placeholder(), p)
}

proof fn lemma_template_has_placeholder(k: int)
    requires
        0 <= k < url_table().len(),
        url_table()[k].0 != "spaceship"@,
        url_table()[k].0 != "ovhcloud"@,
        url_table()[k].0 != "inwx"@,
    ensures
        has_placeholder(url_table()[k].1),
{
    reveal_strlit("{domain}");
    if k == 0 {
        reveal_strlit("https://domains.cloudflare.com/?domain={domain}");
        assert(url_table()[k].1.subrange(39, 47) =~= domain_placeholder());
        assert(occurs_at(url_table()[k].1, domain_placeholder(), 39));
    } else if k == 1 {
        reveal_strlit("https://porkbun.com/checkout/search?q={domain}");
        assert(url_table()[k].1.subrange(38, 46) =~= domain_placeholder());
        assert(occurs_at(url_table()[k].1, domain_placeholder(), 38));
    } else if k == 2 {
        reveal_strlit("https://www.namecheap.com/domains/registration/results/?domain={domain}");
        assert(url_table()[k].1.subrange(63, 71) =~= domain_placeholder());
        assert(occurs_at(url_table()[k].1, domain_placeholder(), 63));
    } else if k == 3 {
        reveal_strlit("https://www.godaddy.com/domainsearch/find?domainToCheck={domain}");
        assert(url_table()[k].1.subrange(56, 64) =~= domain_placeholder());
        assert(occurs_at(url_table()[k].1, domain_placeholder(), 56));
    } else if k == 4 {
        reveal_strlit("https://www.dynadot.com/domain/search.html?domain={domain}");
        assert(url_table()[k].1.subrange(50, 58) =~= domain_placeholder());
        assert(occurs_at(url_table()[k].1, domain_placeholder(), 50));
    } else if k == 6 {
        reveal_strlit("https://regery.com/en/domains/search?q={domain}");
        assert(url_table()[k].1.subrange(39, 47) =~= domain_placeholder());
        assert(occurs_at(url_table()[k].1, domain_placeholder(), 39));
    } else if k == 7 {
        reveal_strlit("https://mchost.com/services/domains/check/?domain={domain}");
        assert(url_table()[k].1.subrange(50, 58) =~= domain_placeholder());
        assert(occurs_at(url_table()[k].1, domain_placeholder(), 50));
    } else if k == 8 {
        reveal_strlit("https://www.sav.com/?domain={domain}");
        assert(url_table()[k].1.subrange(28, 36) =~= domain_placeholder());
        assert(occurs_at(url_table()[k].1, domain_placeholder(), 28));
    } else if k == 10 {
        reveal_strlit("https://www.ionos.com/domains/domain-check?domainName={domain}");
        assert(url_table()[k].1.subrange(54, 62) =~= domain_placeholder());
        assert(occurs_at(url_table()[k].1, domain_placeholder(), 54));
    } else if k == 11 {
        reveal_strlit("https://www.one.com/en/domain/?q={domain}");
        assert(url_table()[k].1.subrange(33, 41) =~= domain_placeholder());
        assert(occurs_at(url_table()[k].1, domain_placeholder(), 33));
    } else if k == 12 {
        reveal_strlit("https://www.infomaniak.com/en/domains/find?q={domain}");
        assert(url_table()[k].1.subrange(45, 53) =~= domain_placeholder());
        assert(occurs_at(url_table()[k].1, domain_placeholder(), 45));
    } else if k == 13 {
        reveal_strlit("https://www.gname.com/domain_check?domain={domain}");
        assert(url_table()[k].1.subrange(42, 50) =~= domain_placeholder());
        assert(occurs_at(url_table()[k].1, domain_placeholder(), 42));
    } else if k == 14 {
        reveal_strlit("https://www.domgate.com/domaincheck?domain={domain}");
        assert(url_table()[k].1.subrange(43, 51) =~= domain_placeholder());
        assert(occurs_at(url_table()[k].1, domain_placeholder(), 43));
    } else if k == 15 {
        reveal_strlit("https://www.101domain.com/domain_search.htm?domain={domain}");
        assert(url_table()[k].1.subrange(51, 59) =~= domain_placeholder());
        assert(occurs_at(url_table()[k].1, domain_placeholder(), 51));
    } else if k == 17 {
        reveal_strlit("https://www.ovh.com/us/domains/domain_search/?search={domain}");
        assert(url_table()[k].1.subrange(53, 61) =~= domain_placeholder());
        assert(occurs_at(url_table()[k].1, domain_placeholder(), 53));
    } else if k == 18 {
        reveal_strlit("https://www.atakdomain.com/en/domain/search?q={domain}");
        assert(url_table()[k].1.subrange(46, 54) =~= domain_placeholder());
        assert(occurs_at(url_table()[k].1, domain_placeholder(), 46));
    } else if k == 19 {
        reveal_strlit("https://www.onlydomains.com/domain-search?q={domain}");
        assert(url_table()[k].1.subrange(44, 52) =~= domain_placeholder());
        assert(occurs_at(url_table()[k].1, domain_placeholder(), 44));
    } else if k == 20 {
        reveal_strlit("https://www.gandi.net/en/domain/search?q={domain}");
        assert(url_table()[k].1.subrange(41, 49) =~= domain_placeholder());
        assert(occurs_at(url_table()[k].1, domain_placeholder(), 41));
    } else if k == 21 {
        reveal_strlit("https://www.namesilo.com/domain/search-domains?q={domain}");
        assert(url_table()[k].1.subrange(49, 57) =~= domain_placeholder());
        assert(occurs_at(url_table()[k].1, domain_placeholder(), 49));
    } else if k == 22 {
        reveal_strlit("https://www.openprovider.com/domain-check/?domain={domain}");
        assert(url_table()[k].1.subrange(50, 58) =~= domain_placeholder());
        assert(occurs_at(url_table()[k].1, domain_placeholder(), 50));
    } else if k == 23 {
        reveal_strlit("https://www.loopia.com/domain/?q={domain}");
        assert(url_table()[k].1.subrange(33, 41) =~= domain_placeholder());
        assert(occurs_at(url_table()[k].1, domain_placeholder(), 33));
    } else if k == 24 {
        reveal_strlit("https://www.hexonet.net/domain-check?domain={domain}");
        assert(url_table()[k].1.subrange(44, 52) =~= domain_placeholder());
        assert(occurs_at(url_table()[k].1, domain_placeholder(), 44));
    } else if k == 25 {
        reveal_strlit("https://www.planethoster.com/en/Domain-Search?q={domain}");
        assert(url_table()[k].1.subrange(48, 56) =~= domain_placeholder());
        assert(occurs_at(url_table()[k].1, domain_placeholder(), 48));
    } else if k == 26 {
        reveal_strlit("https://www.netim.com/en/domain-name-search?q={domain}");
        assert(url_table()[k].1.subrange(46, 54) =~= domain_placeholder());
        assert(occurs_at(url_table()[k].1, domain_placeholder(), 46));
    } else if k == 27 {
        reveal_strlit("https://www.above.com/domain-search/?q={domain}");
        assert(url_table()[k].1.subrange(39, 47) =~= domain_placeholder());
        assert(occurs_at(url_table()[k].1, domain_placeholder(), 39));
    } else if k == 28 {
        reveal_strlit("https://www.squarespace.com/domain-search?q={domain}");
        assert(url_table()[k].1.subrange(44, 52) =~= domain_placeholder());
        assert(occurs_at(url_table()[k].1, domain_placeholder(), 44));
    } else if k == 29 {
        reveal_strlit("https://www.name.com/domain/search/{domain}");
        assert(url_table()[k].1.subrange(35, 43) =~= domain_placeholder());
        assert(occurs_at(url_table()[k].1, domain_placeholder(), 35));
    } else if k == 30 {
        reveal_strlit("https://www.bigrock.in/domain-search?q={domain}");
        assert(url_table()[k].1.subrange(39, 47) =~= domain_placeholder());
        assert(occurs_at(url_table()[k].1, domain_placeholder(), 39));
    } else if k == 31 {
        reveal_strlit("https://www.blacknight.com/domain-names/?q={domain}");
        assert(url_table()[k].1.subrange(43, 51) =~= domain_placeholder());
        assert(occurs_at(url_table()[k].1, domain_placeholder(), 43));
    } else if k == 32 {
        reveal_strlit("https://www.dreamhost.com/domains/?q={domain}");
        assert(url_table()[k].1.subrange(37, 45) =~= domain_placeholder());
        assert(occurs_at(url_table()[k].1, domain_placeholder(), 37));
    } else if k == 33 {
        reveal_strlit("https://www.hostinger.com/domain-name-search?q={domain}");
        assert(url_table()[k].1.subrange(47, 55) =~= domain_placeholder());
        assert(occurs_at(url_table()[k].1, domain_placeholder(), 47));
    } else if k == 34 {
        reveal_strlit("https://www.wix.com/domain/names?q={domain}");
        assert(url_table()[k].1.subrange(35, 43) =~= domain_placeholder());
        assert(occurs_at(url_table()[k].1, domain_placeholder(), 35));
    } else if k == 35 {
        reveal_strlit("https://wordpress.com/domains/?q={domain}");
        assert(url_table()[k].1.subrange(33, 41) =~= domain_placeholder());
        assert(occurs_at(url_table()[k].1, domain_placeholder(), 33));
    } else if k == 36 {
        reveal_strlit("https://www.dinahosting.com/en/domains/search?q={domain}");
        assert(url_table()[k].1.subrange(48, 56) =~= domain_placeholder());
        assert(occurs_at(url_table()[k].1, domain_placeholder(), 48));
    } else if k == 37 {
        reveal_strlit("https://www.networksolutions.com/domain-name-search?q={domain}");
        assert(url_table()[k].1.subrange(54, 62) =~= domain_placeholder());
        assert(occurs_at(url_table()[k].1, domain_placeholder(), 54));
    } else if k == 38 {
        reveal_strlit("https://internetbs.net/en/domain-search?q={domain}");
        assert(url_table()[k].1.subrange(42, 50) =~= domain_placeholder());
        assert(occurs_at(url_table()[k].1, domain_placeholder(), 42));
    } else if k == 39 {
        reveal_strlit("https://www.uk2.net/domain-check/?q={domain}");
        assert(url_table()[k].1.subrange(36, 44) =~= domain_placeholder());
        assert(occurs_at(url_table()[k].1, domain_placeholder(), 36));
    } else if k == 40 {
        reveal_strlit("https://www.123-reg.co.uk/domain-search?q={domain}");
        assert(url_table()[k].1.subrange(42, 50) =~= domain_placeholder());
        assert(occurs_at(url_table()[k].1, domain_placeholder(), 42));
    } else if k == 41 {
        reveal_strlit("https://www.encirca.com/domain-search/?q={domain}");
        assert(url_table()[k].1.subrange(41, 49) =~= domain_placeholder());
        assert(occurs_at(url_table()[k].1, domain_placeholder(), 41));
    } else if k == 42 {
        reveal_strlit("https://www.instra.com/en/domain-names/domain-name-search?domain={domain}");
        assert(url_table()[k].1.subrange(65, 73) =~= domain_placeholder());
        assert(occurs_at(url_table()[k].1, domain_placeholder(), 65));
    } else if k == 43 {
        reveal_strlit("https://nic.names/domain/{domain}");
        assert(url_table()[k].1.subrange(25, 33) =~= domain_placeholder());
        assert(occurs_at(url_table()[k].1, domain_placeholder(), 25));
    } else if k == 44 {
        reveal_strlit("https://www.z.com/jp/domain/search/?q={domain}");
        assert(url_table()[k].1.subrange(38, 46) =~= domain_placeholder());
        assert(occurs_at(url_table()[k].1, domain_placeholder(), 38));
    }
}

/// Every URL template but those of spaceship, ovhcloud and inwx (whose
/// search pages are script-driven apps) holds the domain placeholder.
pub proof fn lemma_templates_hold_placeholder()
    ensures
        forall|k: int|
            0 <= k < url_table().len() && url_table()[k].0 != "spaceship"@ && url_table()[k].0
                != "ovhcloud"@ && url_table()[k].0 != "inwx"@ ==> has_placeholder(
                #[trigger] url_table()[k].1,
            ),
{
    assert forall|k: int|
        0 <= k < url_table().len() && url_table()[k].0 != "spaceship"@ && url_table()[k].0
            != "ovhcloud"@ && url_table()[k].0 != "inwx"@ implies has_placeholder(
        #[trigger] url_table()[k].1,
    ) by {
        lemma_template_has_placeholder(k);
    }
}

/// Filling a template that holds the placeholder puts the domain into the
/// result.
pub proof fn lemma_filled_holds_domain(t: Seq<char>, d: Seq<char>, k: int)
    requires
        occurs_at(t, domain_placeholder(), k),
    ensures
        contains_text(replace_all(t, domain_placeholder(), d), d),
    decreases t.len(),
{
    let pat = domain_placeholder();
    reveal_strlit("{domain}");
    let r = replace_all(t, pat, d);
    if occurs_at(t, pat, 0) {
        assert(t.subrange(0, pat.len() as int) =~= t.subrange(0, 0 + pat.len() as int));
        let tail = replace_all(t.subrange(pat.len() as int, t.len() as int), pat, d);
        assert(r == d + tail);
        assert(r.subrange(0, d.len() as int) =~= d);
        assert(text_at(r, d, 0));
    } else {
        assert(t.subrange(0, pat.len() as int) =~= t.subrange(0, 0 + pat.len() as int));
        let u = t.subrange(1, t.len() as int);
        assert(k > 0);
        assert(u.subrange(k - 1, k - 1 + pat.len()) =~= t.subrange(k, k + pat.len()));
        lemma_filled_holds_domain(u, d, k - 1);
        let ru = replace_all(u, pat, d);
        let i = choose|i: int| text_at(ru, d, i);
        assert(r == seq![t[0]] + ru);
        assert(r.subrange(i + 1, i + 1 + d.len()) =~= ru.subrange(i, i + d.len()));
        assert(text_at(r, d, i + 1));
    }
}

/// The search URL of every registrar with a template, but spaceship,
/// ovhcloud and inwx, holds the domain it was asked for.
pub proof fn lemma_search_url_holds_domain(slug: Seq<char>, d: Seq<char>)
    requires
        lookup_template(url_table(), slug) is Some,
        slug != "spaceship"@,
        slug != "ovhcloud"@,
        slug != "inwx"@,
    ensures
        search_url(slug, d) matches Some(u) && contains_text(u, d),
{
    let k = lemma_lookup_position(url_table(), slug);
    lemma_template_has_placeholder(k);
    let t = url_table()[k].1;
    let p = choose|p: int| occurs_at(t, domain_placeholder(), p);
    lemma_filled_holds_domain(t, d, p);
}

/// The template a lookup finds is that of an entry with the slug.
pub proof fn lemma_lookup_position(table: Seq<(Seq<char>, Seq<char>)>, slug: Seq<char>) -> (k: int)
    requires
        lookup_template(table, slug) is Some,
    ensures
        0 <= k < table.len(),
        table[k].0 == slug,
        lookup_template(table, slug) == Some(table[k].1),
    decreases table.len(),
{
    if table[0].0 == slug {
        0
    } else {
        let k = lemma_lookup_position(table.drop_first(), slug);
        assert(table.drop_first()[k] == table[k + 1]);
        k + 1
    }
}

/// How many hours a cached price table stays usable.
pub const CACHE_TTL_HOURS: u64 = 24;

/// Where the per-registrar price matrix is published.
pub const PRICING_URL: &'static str = "https://tldwise.com/data/registrar-price-matrix.json";

/// Where the cheapest-registrar index is published.
pub const PRICE_INDEX_URL: &'static str = "https://tldwise.com/data/home-price-index.json";

/// The application's name, which names its cache directory.
pub const APP_NAME: &'static str = "domain-search";

} // verus!
